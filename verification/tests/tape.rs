use gradtape::number::{numbers_equal, ONE, ZERO};
use gradtape::shape::{duplicate, element_count};
use gradtape::tape::{filled, GradientRef, GradientTape, Operation};
use gradtape::tensor::{Grad, Tensor};

fn times(a: u32, b: u32) -> u32 {
    (f32::from_bits(a) * f32::from_bits(b)).to_bits()
}

fn plus(a: u32, b: u32) -> u32 {
    (f32::from_bits(a) + f32::from_bits(b)).to_bits()
}

fn bits(values: &[f32]) -> Vec<u32> {
    values.iter().map(|v| v.to_bits()).collect()
}

fn floats(values: &[u32]) -> Vec<f32> {
    values.iter().map(|v| f32::from_bits(*v)).collect()
}

#[test]
fn constants_are_the_patterns_of_zero_and_one() {
    assert_eq!(ZERO, 0.0f32.to_bits());
    assert_eq!(ONE, 1.0f32.to_bits());
}

#[test]
fn numbers_equal_agrees_with_float_equality() {
    let samples = [
        0.0f32,
        -0.0,
        1.0,
        -1.0,
        -1e10,
        -1e9,
        f32::INFINITY,
        f32::NEG_INFINITY,
        f32::NAN,
        -f32::NAN,
        f32::MIN_POSITIVE,
        f32::from_bits(1),
        f32::from_bits(0x7fc0_0001),
        f32::MAX,
    ];
    for a in samples {
        for b in samples {
            assert_eq!(numbers_equal(a.to_bits(), b.to_bits()), a == b);
        }
    }
}

#[test]
fn element_count_is_the_product() {
    assert_eq!(element_count(&vec![]), Some(1));
    assert_eq!(element_count(&vec![3]), Some(3));
    assert_eq!(element_count(&vec![2, 3, 4]), Some(24));
    assert_eq!(element_count(&vec![2, 0, 4]), Some(0));
    assert_eq!(element_count(&vec![usize::MAX, 1]), Some(usize::MAX));
}

#[test]
fn element_count_tells_overflow() {
    assert_eq!(element_count(&vec![usize::MAX, 2]), None);
    assert_eq!(element_count(&vec![usize::MAX, usize::MAX, 0]), Some(0));
    assert_eq!(element_count(&vec![1usize << 40, 1usize << 40]), None);
}

#[test]
fn duplicate_and_filled() {
    assert_eq!(duplicate(&vec![4, 5, 6]), vec![4, 5, 6]);
    assert_eq!(filled(7, 3), vec![7, 7, 7]);
    assert_eq!(filled(7, 0), Vec::<u32>::new());
}

#[test]
fn store_gradient_allocates_zeros_under_fresh_refs() {
    let mut tape = GradientTape::new();
    let a = tape.store_gradient(vec![2, 2]);
    let b = tape.store_gradient(vec![]);
    let c = tape.store_gradient(vec![3, 0]);
    assert_eq!((a.index, b.index, c.index), (0, 1, 2));
    assert_eq!(floats(tape.gradient(a)), vec![0.0f32; 4]);
    assert_eq!(floats(tape.gradient(b)), vec![0.0f32]);
    assert_eq!(tape.gradient(c).len(), 0);
    assert_eq!(tape.gradient_shape(a), &vec![2usize, 2]);
    assert_eq!(tape.gradient_shape(c), &vec![3usize, 0]);
}

#[test]
fn backward_seeds_the_root_with_ones() {
    let mut tape = GradientTape::new();
    let a = tape.store_gradient(vec![3]);
    let b = tape.store_gradient(vec![2]);
    tape.backward(b, &times, &plus);
    assert_eq!(floats(tape.gradient(b)), vec![1.0f32, 1.0]);
    assert_eq!(floats(tape.gradient(a)), vec![0.0f32, 0.0, 0.0]);
}

#[test]
fn two_consumers_add_up() {
    let mut tape = GradientTape::new();
    let t = tape.store_gradient(vec![2]);
    let y1 = tape.store_gradient(vec![2]);
    let y2 = tape.store_gradient(vec![2]);
    let z = tape.store_gradient(vec![2]);
    tape.add_operation(Operation { output: y1, input: t, derivative: bits(&[2.0, 3.0]) });
    tape.add_operation(Operation { output: y2, input: t, derivative: bits(&[10.0, 20.0]) });
    tape.add_operation(Operation { output: z, input: y1, derivative: bits(&[1.0, 1.0]) });
    tape.add_operation(Operation { output: z, input: y2, derivative: bits(&[0.5, 0.25]) });
    tape.backward(z, &times, &plus);
    assert_eq!(floats(tape.gradient(y1)), vec![1.0f32, 1.0]);
    assert_eq!(floats(tape.gradient(y2)), vec![0.5f32, 0.25]);
    assert_eq!(floats(tape.gradient(t)), vec![2.0f32 + 5.0, 3.0 + 5.0]);
}

#[test]
fn replay_runs_last_recorded_first() {
    let mut tape = GradientTape::new();
    let a = tape.store_gradient(vec![1]);
    let b = tape.store_gradient(vec![1]);
    let c = tape.store_gradient(vec![1]);
    tape.add_operation(Operation { output: b, input: a, derivative: bits(&[3.0]) });
    tape.add_operation(Operation { output: c, input: b, derivative: bits(&[5.0]) });
    tape.backward(c, &times, &plus);
    assert_eq!(floats(tape.gradient(c)), vec![1.0f32]);
    assert_eq!(floats(tape.gradient(b)), vec![5.0f32]);
    assert_eq!(floats(tape.gradient(a)), vec![15.0f32]);
    assert_eq!(tape.operations.len(), 2);
}

#[test]
fn single_number_output_reaches_every_input_element() {
    let mut tape = GradientTape::new();
    let a = tape.store_gradient(vec![3]);
    let s = tape.store_gradient(vec![]);
    tape.add_operation(Operation { output: s, input: a, derivative: bits(&[0.5, 0.25, 2.0]) });
    tape.backward(s, &times, &plus);
    assert_eq!(floats(tape.gradient(a)), vec![0.5f32, 0.25, 2.0]);
}

#[test]
fn gradients_keep_the_shape_of_their_tensor() {
    let mut t = Tensor::with_grad(vec![2, 3], bits(&[1.0, 2.0, 3.0, 4.0, 5.0, 6.0]), None);
    t.keep_tape(Box::new(GradientTape::new()));
    let r = t.gradient_ref();
    let tape = t.backward(&times, &plus).unwrap();
    assert_eq!(tape.gradient_shape(r), &vec![2usize, 3]);
    assert_eq!(floats(tape.gradient(r)), vec![1.0f32; 6]);
}

#[test]
fn take_tape_twice() {
    let mut t = Tensor::with_grad(vec![2], bits(&[1.0, 2.0]), None);
    assert!(t.take_tape().is_none());
    t.keep_tape(Box::new(GradientTape::new()));
    let r = t.gradient_ref();
    assert!(t.grad().as_ref().unwrap().tape.is_some());
    let first = t.take_tape();
    assert!(first.is_some());
    assert!(t.grad().as_ref().unwrap().tape.is_none());
    assert!(t.take_tape().is_none());
    assert_eq!(t.gradient_ref(), r);
    assert_eq!(floats(t.data()), vec![1.0f32, 2.0]);
}

#[test]
fn keep_tape_allocates_once() {
    let mut t = Tensor::with_grad(vec![2], bits(&[1.0, 2.0]), None);
    assert!(t.grad().is_none());
    let mut tape = GradientTape::new();
    let earlier = tape.store_gradient(vec![5]);
    t.keep_tape(Box::new(tape));
    let r = t.gradient_ref();
    assert_eq!(earlier.index, 0);
    assert_eq!(r.index, 1);
    let tape = t.take_tape().unwrap();
    assert_eq!(tape.values.len(), 2);
    assert_eq!(floats(tape.gradient(r)), vec![0.0f32, 0.0]);
    t.keep_tape(tape);
    assert_eq!(t.gradient_ref(), r);
    assert_eq!(t.take_tape().unwrap().values.len(), 2);
}

#[test]
fn accessors_reach_the_fields() {
    let mut t = Tensor::with_grad(vec![2], bits(&[1.0, 2.0]), Some(Grad::new(GradientRef { index: 4 })));
    assert_eq!(t.gradient_ref().index, 4);
    t.mut_data()[0] = 9.0f32.to_bits();
    assert_eq!(floats(t.data()), vec![9.0f32, 2.0]);
    *t.mut_grad() = None;
    assert!(t.grad().is_none());
    assert_eq!(t.shape(), &vec![2usize]);
}

#[test]
fn num_elements_counts_the_data() {
    let t = Tensor::with_grad(vec![2, 3], bits(&[1.0, 2.0, 3.0, 4.0, 5.0, 6.0]), None);
    assert_eq!(t.num_elements(), 6);
    assert_eq!(element_count(t.shape()), Some(t.num_elements()));
}

#[test]
fn mut_gradient_writes_one_slot() {
    let mut tape = GradientTape::new();
    let a = tape.store_gradient(vec![2]);
    let b = tape.store_gradient(vec![2]);
    tape.mut_gradient(b)[1] = 4.0f32.to_bits();
    assert_eq!(floats(tape.gradient(a)), vec![0.0f32, 0.0]);
    assert_eq!(floats(tape.gradient(b)), vec![0.0f32, 4.0]);
}

#[test]
fn operation_fits_checks_slots_order_and_lengths() {
    let mut tape = GradientTape::new();
    let a = tape.store_gradient(vec![3]);
    let b = tape.store_gradient(vec![3]);
    let s = tape.store_gradient(vec![]);
    let two = tape.store_gradient(vec![2]);
    let missing = GradientRef { index: 9 };
    let op = |output, input, n: usize| Operation { output, input, derivative: vec![ONE; n] };
    assert!(tape.operation_fits(&op(b, a, 3)));
    assert!(tape.operation_fits(&op(s, a, 3)));
    assert!(!tape.operation_fits(&op(a, b, 3)));
    assert!(!tape.operation_fits(&op(a, a, 3)));
    assert!(!tape.operation_fits(&op(b, a, 2)));
    assert!(!tape.operation_fits(&op(two, a, 3)));
    assert!(!tape.operation_fits(&op(missing, a, 3)));
}

#[test]
fn tape_well_formedness_is_decided() {
    let mut tape = GradientTape::new();
    assert!(tape.is_well_formed());
    let a = tape.store_gradient(vec![2]);
    let b = tape.store_gradient(vec![2]);
    tape.add_operation(Operation { output: b, input: a, derivative: bits(&[1.0, 1.0]) });
    assert!(tape.is_well_formed());
    tape.mut_gradient(a).push(0);
    assert!(!tape.is_well_formed());
    tape.mut_gradient(a).pop();
    assert!(tape.is_well_formed());
    tape.operations.push(Operation { output: a, input: b, derivative: bits(&[1.0, 1.0]) });
    assert!(!tape.is_well_formed());
    tape.operations.pop();
    tape.shapes.pop();
    assert!(!tape.is_well_formed());
}

#[test]
fn tensor_well_formedness_is_decided() {
    let good = Tensor::with_grad(vec![2, 2], bits(&[1.0, 2.0, 3.0, 4.0]), None);
    assert!(good.is_well_formed());
    let short = Tensor::with_grad(vec![2, 2], bits(&[1.0, 2.0, 3.0]), None);
    assert!(!short.is_well_formed());
    let huge = Tensor::with_grad(vec![usize::MAX, 2], Vec::new(), None);
    assert!(!huge.is_well_formed());
    let mut tape = GradientTape::new();
    let r = tape.store_gradient(vec![4]);
    let other_shape = Tensor::with_grad(
        vec![2, 2],
        bits(&[1.0, 2.0, 3.0, 4.0]),
        Some(Grad { gradient_ref: r, tape: Some(Box::new(tape)) }),
    );
    assert!(!other_shape.is_well_formed());
    let no_slot = Tensor::with_grad(
        vec![1],
        bits(&[1.0]),
        Some(Grad { gradient_ref: r, tape: Some(Box::new(GradientTape::new())) }),
    );
    assert!(!no_slot.is_well_formed());
    let mut held = Tensor::with_grad(vec![1], bits(&[1.0]), None);
    held.keep_tape(Box::new(GradientTape::new()));
    assert!(held.is_well_formed());
}
