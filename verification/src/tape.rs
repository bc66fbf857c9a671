//! The gradient tape: a store of gradient slots and the log of operations to
//! replay backward over it.

use vstd::prelude::*;
use crate::number::{apply, operation_of, single_valued, total, ONE, ZERO};
use crate::shape::{element_count, num_elements};

verus! {

/// Identifier of one gradient slot of a tape. Slots are numbered in the order
/// in which they were allocated.
#[derive(Clone, Copy, Debug, PartialEq, Eq)]
pub struct GradientRef {
    pub index: usize,
}

/// One recorded operation: at replay, the gradient of `output`, scaled
/// elementwise by `derivative`, is added to the gradient of `input`.
#[derive(Debug)]
pub struct Operation {
    pub output: GradientRef,
    pub input: GradientRef,
    pub derivative: Vec<u32>,
}

/// The log of recorded operations and the gradient store. Slot `i` of the
/// store has the extents `shapes[i]` and the elements `values[i]`.
#[derive(Debug)]
pub struct GradientTape {
    pub operations: Vec<Operation>,
    pub shapes: Vec<Vec<usize>>,
    pub values: Vec<Vec<u32>>,
}

/// `n` elements equal to `value`.
pub open spec fn constant(value: u32, n: nat) -> Seq<u32> {
    Seq::new(n, |i: int| value)
}

/// The store with the slot `root` replaced by ones.
pub open spec fn seeded(store: Seq<Seq<u32>>, root: int) -> Seq<Seq<u32>> {
    store.update(root, constant(ONE, store[root].len()))
}

/// The element of an output gradient that element `i` of the input reads: the
/// only one where the output is a single number, else the one at `i`.
pub open spec fn source_index(output_len: nat, i: int) -> int {
    if output_len == 1 {
        0
    } else {
        i
    }
}

/// Whether `op` can be replayed over `store`: both slots exist, the input was
/// allocated before the output, the derivative has one element for each
/// element of the input, and the output has as many or is a single number.
pub open spec fn fits(op: Operation, store: Seq<Seq<u32>>) -> bool {
    &&& op.input.index < op.output.index < store.len()
    &&& op.derivative@.len() == store[op.input.index as int].len()
    &&& (store[op.output.index as int].len() == store[op.input.index as int].len()
        || store[op.output.index as int].len() == 1)
}

/// What `op` adds to the gradient of its input: its derivative times the
/// gradient of its output, element by element.
pub open spec fn contribution(
    op: Operation,
    store: Seq<Seq<u32>>,
    times: spec_fn(u32, u32) -> u32,
) -> Seq<u32> {
    let out = store[op.output.index as int];
    Seq::new(
        op.derivative@.len(),
        |i: int| times(op.derivative@[i], out[source_index(out.len(), i)]),
    )
}

/// `slot` with `delta` added element by element.
pub open spec fn accumulated(
    slot: Seq<u32>,
    delta: Seq<u32>,
    plus: spec_fn(u32, u32) -> u32,
) -> Seq<u32> {
    Seq::new(slot.len(), |i: int| plus(slot[i], delta[i]))
}

/// The store after `op` alone was replayed.
pub open spec fn step(
    store: Seq<Seq<u32>>,
    op: Operation,
    times: spec_fn(u32, u32) -> u32,
    plus: spec_fn(u32, u32) -> u32,
) -> Seq<Seq<u32>> {
    store.update(
        op.input.index as int,
        accumulated(store[op.input.index as int], contribution(op, store, times), plus),
    )
}

/// The store after every operation of `ops` was replayed, the last one first.
pub open spec fn replay(
    store: Seq<Seq<u32>>,
    ops: Seq<Operation>,
    times: spec_fn(u32, u32) -> u32,
    plus: spec_fn(u32, u32) -> u32,
) -> Seq<Seq<u32>>
    decreases ops.len(),
{
    if ops.len() == 0 {
        store
    } else {
        replay(step(store, ops.last(), times, plus), ops.drop_last(), times, plus)
    }
}

/// A vector of `n` elements equal to `value`.
pub fn filled(value: u32, n: usize) -> (r: Vec<u32>)
    ensures
        r@ == constant(value, n as nat),
{
    let mut r: Vec<u32> = Vec::new();
    let mut i: usize = 0;
    while i < n
        invariant
            0 <= i <= n,
            r@.len() == i,
            forall|j: int| 0 <= j < i ==> r@[j] == value,
        decreases n - i,
    {
        r.push(value);
        i += 1;
    }
    proof {
        assert(r@ =~= constant(value, n as nat));
    }
    r
}

impl GradientTape {
    /// The elements of every slot.
    pub open spec fn store(&self) -> Seq<Seq<u32>> {
        Seq::new(self.values@.len(), |i: int| self.values@[i]@)
    }

    /// The extents of every slot.
    pub open spec fn slot_shapes(&self) -> Seq<Seq<usize>> {
        Seq::new(self.shapes@.len(), |i: int| self.shapes@[i]@)
    }

    /// The recorded operations, oldest first.
    pub open spec fn recorded(&self) -> Seq<Operation> {
        self.operations@
    }

    /// Every slot has the number of elements that its extents span, and every
    /// recorded operation fits the store.
    pub open spec fn wf(&self) -> bool {
        &&& self.shapes@.len() == self.values@.len()
        &&& forall|i: int|
            0 <= i < self.values@.len() ==> (#[trigger] self.values@[i])@.len() == num_elements(
                self.shapes@[i]@,
            )
        &&& forall|k: int|
            0 <= k < self.operations@.len() ==> fits(#[trigger] self.operations@[k], self.store())
    }

    /// Whether `r` names a slot of this tape.
    pub open spec fn has_slot(&self, r: GradientRef) -> bool {
        r.index < self.store().len()
    }

    /// A tape with no slot and no operation.
    pub fn new() -> (tape: GradientTape)
        ensures
            tape.wf(),
            tape.store() == Seq::<Seq<u32>>::empty(),
            tape.slot_shapes() == Seq::<Seq<usize>>::empty(),
            tape.recorded() == Seq::<Operation>::empty(),
    {
        let tape = GradientTape { operations: Vec::new(), shapes: Vec::new(), values: Vec::new() };
        proof {
            assert(tape.store() =~= Seq::<Seq<u32>>::empty());
            assert(tape.slot_shapes() =~= Seq::<Seq<usize>>::empty());
            assert(tape.recorded() =~= Seq::<Operation>::empty());
        }
        tape
    }

    /// Allocates a slot of zeros with the extents `shape` behind all existing
    /// slots, and returns its identifier.
    pub fn store_gradient(&mut self, shape: Vec<usize>) -> (r: GradientRef)
        requires
            old(self).wf(),
            num_elements(shape@) <= usize::MAX,
        ensures
            final(self).wf(),
            final(self).has_slot(r),
            r.index == old(self).store().len(),
            final(self).store() == old(self).store().push(
                constant(ZERO, num_elements(shape@)),
            ),
            final(self).slot_shapes() == old(self).slot_shapes().push(shape@),
            final(self).recorded() == old(self).recorded(),
    {
        let index: usize = self.values.len();
        let n: usize = match element_count(&shape) {
            Some(n) => n,
            None => 0,
        };
        let zeros = filled(ZERO, n);
        self.shapes.push(shape);
        self.values.push(zeros);
        proof {
            assert(self.store() =~= old(self).store().push(constant(ZERO, num_elements(shape@))));
            assert(self.slot_shapes() =~= old(self).slot_shapes().push(shape@));
            assert forall|k: int| 0 <= k < self.operations@.len() implies fits(
                #[trigger] self.operations@[k],
                self.store(),
            ) by {
                assert(fits(old(self).operations@[k], old(self).store()));
            }
        }
        GradientRef { index }
    }

    /// The gradient held in slot `r`.
    pub fn gradient(&self, r: GradientRef) -> (g: &Vec<u32>)
        requires
            self.has_slot(r),
        ensures
            g@ == self.store()[r.index as int],
    {
        &self.values[r.index]
    }

    /// The extents of slot `r`.
    pub fn gradient_shape(&self, r: GradientRef) -> (s: &Vec<usize>)
        requires
            self.has_slot(r),
            self.wf(),
        ensures
            s@ == self.slot_shapes()[r.index as int],
    {
        &self.shapes[r.index]
    }

    /// Exclusive access to the gradient held in slot `r`.
    pub fn mut_gradient(&mut self, r: GradientRef) -> (g: &mut Vec<u32>)
        requires
            old(self).has_slot(r),
        ensures
            *g == old(self).values@[r.index as int],
            final(self).values@ == old(self).values@.update(r.index as int, *final(g)),
            final(self).operations == old(self).operations,
            final(self).shapes == old(self).shapes,
    {
        &mut self.values[r.index]
    }

    /// Decides whether `op` fits the store.
    pub fn operation_fits(&self, op: &Operation) -> (r: bool)
        ensures
            r == fits(*op, self.store()),
    {
        let input: usize = op.input.index;
        let output: usize = op.output.index;
        if !(input < output && output < self.values.len()) {
            return false;
        }
        let input_len: usize = self.values[input].len();
        let output_len: usize = self.values[output].len();
        op.derivative.len() == input_len && (output_len == input_len || output_len == 1)
    }

    /// Decides `wf`.
    pub fn is_well_formed(&self) -> (r: bool)
        ensures
            r == self.wf(),
    {
        if self.shapes.len() != self.values.len() {
            return false;
        }
        let mut i: usize = 0;
        while i < self.values.len()
            invariant
                self.shapes@.len() == self.values@.len(),
                0 <= i <= self.values@.len(),
                forall|j: int|
                    0 <= j < i ==> (#[trigger] self.values@[j])@.len() == num_elements(
                        self.shapes@[j]@,
                    ),
            decreases self.values@.len() - i,
        {
            let spanned = element_count(&self.shapes[i]);
            let held: usize = self.values[i].len();
            if spanned != Some(held) {
                assert(self.values@[i as int]@.len() != num_elements(self.shapes@[i as int]@));
                return false;
            }
            i += 1;
        }
        let mut k: usize = 0;
        while k < self.operations.len()
            invariant
                0 <= k <= self.operations@.len(),
                forall|j: int| 0 <= j < k ==> fits(#[trigger] self.operations@[j], self.store()),
            decreases self.operations@.len() - k,
        {
            if !self.operation_fits(&self.operations[k]) {
                assert(!fits(self.operations@[k as int], self.store()));
                return false;
            }
            k += 1;
        }
        true
    }

    /// Appends `op` to the log.
    pub fn add_operation(&mut self, op: Operation)
        requires
            old(self).wf(),
            fits(op, old(self).store()),
        ensures
            final(self).wf(),
            final(self).recorded() == old(self).recorded().push(op),
            final(self).store() == old(self).store(),
            final(self).slot_shapes() == old(self).slot_shapes(),
    {
        self.operations.push(op);
        proof {
            assert(self.store() =~= old(self).store());
            assert forall|k: int| 0 <= k < self.operations@.len() implies fits(
                #[trigger] self.operations@[k],
                self.store(),
            ) by {
                if k < old(self).operations@.len() {
                    assert(fits(old(self).operations@[k], old(self).store()));
                }
            }
        }
    }

    /// Replays the operation at position `k` of the log.
    fn replay_one<M: Fn(u32, u32) -> u32, A: Fn(u32, u32) -> u32>(
        &mut self,
        k: usize,
        times: &M,
        plus: &A,
    )
        requires
            old(self).wf(),
            k < old(self).operations@.len(),
            total(times),
            single_valued(times),
            total(plus),
            single_valued(plus),
        ensures
            final(self).wf(),
            final(self).store() == step(
                old(self).store(),
                old(self).operations@[k as int],
                operation_of(times),
                operation_of(plus),
            ),
            final(self).operations == old(self).operations,
            final(self).shapes == old(self).shapes,
    {
        assert(fits(self.operations@[k as int], self.store()));
        let input: usize = self.operations[k].input.index;
        let output: usize = self.operations[k].output.index;
        let n: usize = self.values[input].len();
        let output_len: usize = self.values[output].len();
        let ghost target = accumulated(
            self.store()[input as int],
            contribution(self.operations@[k as int], self.store(), operation_of(times)),
            operation_of(plus),
        );
        let mut updated: Vec<u32> = Vec::new();
        let mut i: usize = 0;
        while i < n
            invariant
                0 <= i <= n,
                k < self.operations@.len(),
                input == self.operations@[k as int].input.index,
                output == self.operations@[k as int].output.index,
                input < output < self.values@.len(),
                n == self.values@[input as int]@.len(),
                n == self.operations@[k as int].derivative@.len(),
                output_len == self.values@[output as int]@.len(),
                output_len == n || output_len == 1,
                total(times),
                single_valued(times),
                total(plus),
                single_valued(plus),
                target == accumulated(
                    self.store()[input as int],
                    contribution(self.operations@[k as int], self.store(), operation_of(times)),
                    operation_of(plus),
                ),
                updated@.len() == i,
                forall|j: int| 0 <= j < i ==> updated@[j] == target[j],
            decreases n - i,
        {
            let source: usize = if output_len == 1 {
                0
            } else {
                i
            };
            let scaled: u32 = apply(times, self.operations[k].derivative[i], self.values[output][source]);
            let sum: u32 = apply(plus, self.values[input][i], scaled);
            proof {
                let op = self.operations@[k as int];
                let delta = contribution(op, self.store(), operation_of(times));
                assert(self.store()[output as int] == self.values@[output as int]@);
                assert(self.store()[input as int] == self.values@[input as int]@);
                assert(delta[i as int] == scaled);
                assert(target[i as int] == sum);
            }
            updated.push(sum);
            i += 1;
        }
        proof {
            assert(updated@ =~= target);
        }
        self.values.set(input, updated);
        proof {
            assert(self.store() =~= step(
                old(self).store(),
                old(self).operations@[k as int],
                operation_of(times),
                operation_of(plus),
            ));
            assert forall|j: int| 0 <= j < self.operations@.len() implies fits(
                #[trigger] self.operations@[j],
                self.store(),
            ) by {
                assert(fits(old(self).operations@[j], old(self).store()));
            }
        }
    }

    /// The backward pass from `root`: sets the gradient of `root` to ones,
    /// then replays every recorded operation, the last recorded first.
    pub fn backward<M: Fn(u32, u32) -> u32, A: Fn(u32, u32) -> u32>(
        &mut self,
        root: GradientRef,
        times: &M,
        plus: &A,
    )
        requires
            old(self).wf(),
            old(self).has_slot(root),
            total(times),
            single_valued(times),
            total(plus),
            single_valued(plus),
        ensures
            final(self).wf(),
            final(self).store() == replay(
                seeded(old(self).store(), root.index as int),
                old(self).recorded(),
                operation_of(times),
                operation_of(plus),
            ),
            final(self).slot_shapes() == old(self).slot_shapes(),
            final(self).recorded() == old(self).recorded(),
    {
        let n: usize = self.values[root.index].len();
        let seed = filled(ONE, n);
        self.values.set(root.index, seed);
        proof {
            assert(self.store() =~= seeded(old(self).store(), root.index as int));
            assert forall|j: int| 0 <= j < self.operations@.len() implies fits(
                #[trigger] self.operations@[j],
                self.store(),
            ) by {
                assert(fits(old(self).operations@[j], old(self).store()));
            }
        }
        let ghost start = self.store();
        let ghost ops = self.operations@;
        let mut k: usize = self.operations.len();
        proof {
            assert(ops.take(k as int) =~= ops);
        }
        while k > 0
            invariant
                self.wf(),
                self.operations@ == ops,
                self.shapes == old(self).shapes,
                0 <= k <= ops.len(),
                total(times),
                single_valued(times),
                total(plus),
                single_valued(plus),
                replay(self.store(), ops.take(k as int), operation_of(times), operation_of(plus))
                    == replay(start, ops, operation_of(times), operation_of(plus)),
            decreases k,
        {
            proof {
                assert(ops.take(k as int).drop_last() =~= ops.take(k - 1));
                assert(ops.take(k as int).last() == ops[k - 1]);
            }
            k -= 1;
            self.replay_one(k, times, plus);
        }
        proof {
            assert(ops.take(0).len() == 0);
        }
    }
}

} // verus!
