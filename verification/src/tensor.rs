//! Tensors, and the protocol by which one tape passes from tensor to tensor.

use vstd::prelude::*;
use crate::number::{operation_of, single_valued, total, ZERO};
use crate::shape::{duplicate, element_count, num_elements, same_shape};
use crate::tape::{constant, replay, seeded, GradientRef, GradientTape};

verus! {

/// The elementwise activations. Each returns a new tensor of the same shape
/// and, where `self` holds the tape, passes the tape on to it.
pub trait Activations: Sized {
    fn relu(&mut self) -> Self;

    fn sin(&mut self) -> Self;

    fn cos(&mut self) -> Self;

    fn ln(&mut self) -> Self;

    fn exp(&mut self) -> Self;

    fn sigmoid(&mut self) -> Self;

    fn tanh(&mut self) -> Self;

    fn square(&mut self) -> Self;
}

/// The gradient record of a tensor: the slot that holds its gradient, and the
/// tape where this tensor is the head of the computation.
#[derive(Debug)]
pub struct Grad {
    pub gradient_ref: GradientRef,
    pub tape: Option<Box<GradientTape>>,
}

/// A dense array of fixed shape, its elements in row-major order, with an
/// optional gradient record.
#[derive(Debug)]
pub struct Tensor {
    pub shape: Vec<usize>,
    pub data: Vec<u32>,
    pub grad: Option<Grad>,
}

/// Whether slot `r` of `tape` exists and has the extents `shape`.
pub open spec fn tracks(tape: GradientTape, r: GradientRef, shape: Seq<usize>) -> bool {
    tape.has_slot(r) && tape.slot_shapes()[r.index as int] == shape
}

/// The gradient record without its tape.
pub open spec fn without_tape(grad: Option<Grad>) -> Option<Grad> {
    match grad {
        Some(g) => Some(Grad { gradient_ref: g.gradient_ref, tape: None }),
        None => None,
    }
}

/// The tape of a gradient record, if it holds one.
pub open spec fn tape_of(grad: Option<Grad>) -> Option<Box<GradientTape>> {
    match grad {
        Some(g) => g.tape,
        None => None,
    }
}

impl Grad {
    /// A record for slot `gradient_ref` that holds no tape.
    pub fn new(gradient_ref: GradientRef) -> (g: Grad)
        ensures
            g.gradient_ref == gradient_ref,
            g.tape is None,
    {
        Grad { gradient_ref, tape: None }
    }
}

impl Tensor {
    /// Whether the tensor holds a tape.
    pub open spec fn has_tape(&self) -> bool {
        tape_of(self.grad) is Some
    }

    /// The tape that the tensor holds.
    pub open spec fn tape(&self) -> GradientTape
        recommends
            self.has_tape(),
    {
        *tape_of(self.grad).unwrap()
    }

    /// The slot of the tensor's gradient.
    pub open spec fn slot(&self) -> GradientRef
        recommends
            self.grad is Some,
    {
        self.grad.unwrap().gradient_ref
    }

    /// The tensor with its tape removed.
    pub open spec fn detached(self) -> Tensor {
        Tensor { shape: self.shape, data: self.data, grad: without_tape(self.grad) }
    }

    /// The data fill the shape, and a tape that the tensor holds is well
    /// formed and has a slot of the tensor's shape under the tensor's
    /// identifier.
    pub open spec fn wf(&self) -> bool {
        &&& self.data@.len() == num_elements(self.shape@)
        &&& self.has_tape() ==> self.tape().wf() && tracks(self.tape(), self.slot(), self.shape@)
    }

    /// A tensor of the given extents, elements and gradient record.
    pub fn with_grad(shape: Vec<usize>, data: Vec<u32>, grad: Option<Grad>) -> (t: Tensor)
        ensures
            t.shape == shape,
            t.data == data,
            t.grad == grad,
    {
        Tensor { shape, data, grad }
    }

    /// Decides `wf`.
    pub fn is_well_formed(&self) -> (r: bool)
        ensures
            r == self.wf(),
    {
        if element_count(&self.shape) != Some(self.data.len()) {
            return false;
        }
        match &self.grad {
            Some(g) => match &g.tape {
                Some(tape) => {
                    if !tape.is_well_formed() || g.gradient_ref.index >= tape.values.len() {
                        return false;
                    }
                    same_shape(tape.gradient_shape(g.gradient_ref), &self.shape)
                },
                None => true,
            },
            None => true,
        }
    }

    /// The extents.
    pub fn shape(&self) -> (s: &Vec<usize>)
        ensures
            *s == self.shape,
    {
        &self.shape
    }

    /// The number of elements.
    pub fn num_elements(&self) -> (n: usize)
        ensures
            n == self.data@.len(),
    {
        self.data.len()
    }

    /// The elements.
    pub fn data(&self) -> (d: &Vec<u32>)
        ensures
            *d == self.data,
    {
        &self.data
    }

    /// Exclusive access to the elements.
    pub fn mut_data(&mut self) -> (d: &mut Vec<u32>)
        ensures
            *d == old(self).data,
            final(self).data == *final(d),
            final(self).shape == old(self).shape,
            final(self).grad == old(self).grad,
    {
        &mut self.data
    }

    /// The gradient record.
    pub fn grad(&self) -> (g: &Option<Grad>)
        ensures
            *g == self.grad,
    {
        &self.grad
    }

    /// Exclusive access to the gradient record.
    pub fn mut_grad(&mut self) -> (g: &mut Option<Grad>)
        ensures
            *g == old(self).grad,
            final(self).grad == *final(g),
            final(self).shape == old(self).shape,
            final(self).data == old(self).data,
    {
        &mut self.grad
    }

    /// The identifier of the tensor's gradient slot.
    pub fn gradient_ref(&self) -> (r: GradientRef)
        requires
            self.grad is Some,
        ensures
            r == self.slot(),
    {
        match &self.grad {
            Some(g) => g.gradient_ref,
            None => GradientRef { index: 0 },
        }
    }

    /// Removes the tape from the tensor and returns it; `None` where the
    /// tensor holds none.
    pub fn take_tape(&mut self) -> (tape: Option<Box<GradientTape>>)
        ensures
            tape == tape_of(old(self).grad),
            *final(self) == old(self).detached(),
            !final(self).has_tape(),
    {
        match self.grad.take() {
            Some(g) => {
                let Grad { gradient_ref, tape } = g;
                self.grad = Some(Grad { gradient_ref, tape: None });
                tape
            },
            None => None,
        }
    }

    /// Hands `tape` to the tensor. A tensor without a gradient record gets
    /// one, for a fresh slot of zeros of the tensor's shape.
    pub fn keep_tape(&mut self, tape: Box<GradientTape>)
        requires
            old(self).wf(),
            !old(self).has_tape(),
            tape.wf(),
            old(self).grad is Some ==> tracks(*tape, old(self).slot(), old(self).shape@),
        ensures
            final(self).wf(),
            final(self).shape == old(self).shape,
            final(self).data == old(self).data,
            final(self).has_tape(),
            final(self).tape().recorded() == tape.recorded(),
            old(self).grad is Some ==> final(self).slot() == old(self).slot() && final(self).tape()
                == *tape,
            old(self).grad is None ==> final(self).slot().index == tape.store().len()
                && final(self).tape().store() == tape.store().push(
                constant(ZERO, old(self).data@.len() as nat),
            ) && final(self).tape().slot_shapes() == tape.slot_shapes().push(old(self).shape@),
    {
        let count: usize = self.data.len();
        match self.grad.take() {
            Some(g) => {
                let Grad { gradient_ref, tape: _ } = g;
                self.grad = Some(Grad { gradient_ref, tape: Some(tape) });
            },
            None => {
                let mut inner: GradientTape = *tape;
                assert(count == num_elements(self.shape@));
                let gradient_ref = inner.store_gradient(duplicate(&self.shape));
                self.grad = Some(Grad { gradient_ref, tape: Some(Box::new(inner)) });
                proof {
                    assert(tape.slot_shapes().len() == tape.store().len());
                    assert(inner.store().len() == inner.values@.len());
                    assert(tracks(inner, gradient_ref, self.shape@));
                }
            },
        }
    }

    /// The backward pass from this tensor: takes the tape, sets this tensor's
    /// gradient to ones, replays the tape and returns it.
    pub fn backward<M: Fn(u32, u32) -> u32, A: Fn(u32, u32) -> u32>(
        &mut self,
        times: &M,
        plus: &A,
    ) -> (tape: Option<Box<GradientTape>>)
        requires
            old(self).wf(),
            old(self).has_tape(),
            total(times),
            single_valued(times),
            total(plus),
            single_valued(plus),
        ensures
            *final(self) == old(self).detached(),
            tape is Some,
            tape.unwrap().wf(),
            tape.unwrap().store() == replay(
                seeded(old(self).tape().store(), old(self).slot().index as int),
                old(self).tape().recorded(),
                operation_of(times),
                operation_of(plus),
            ),
            tape.unwrap().slot_shapes() == old(self).tape().slot_shapes(),
            tape.unwrap().recorded() == old(self).tape().recorded(),
    {
        let root = self.gradient_ref();
        match self.take_tape() {
            Some(held) => {
                let mut inner: GradientTape = *held;
                inner.backward(root, times, plus);
                Some(Box::new(inner))
            },
            None => None,
        }
    }
}

} // verus!
