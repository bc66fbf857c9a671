//! Single-precision numbers by their bit patterns, and the arithmetic that a
//! caller supplies.

use vstd::prelude::*;

verus! {

/// Bit pattern of `0.0`.
pub const ZERO: u32 = 0;

/// Bit pattern of `1.0`.
pub const ONE: u32 = 0x3f80_0000;

/// Mask that clears the sign bit.
pub const MAGNITUDE: u32 = 0x7fff_ffff;

/// Bit pattern of positive infinity; every larger magnitude is a NaN.
pub const INFINITY: u32 = 0x7f80_0000;

/// Whether `bits` encodes a NaN: exponent all ones, fraction not zero.
pub open spec fn is_nan(bits: u32) -> bool {
    (bits & MAGNITUDE) > INFINITY
}

/// IEEE 754 equality of two numbers given by their bit patterns: a NaN equals
/// nothing, the two zeros equal each other, and every other number equals
/// exactly its own pattern.
pub open spec fn same_number(a: u32, b: u32) -> bool {
    !is_nan(a) && !is_nan(b) && (a == b || ((a | b) & MAGNITUDE) == 0)
}

/// Decides `same_number`.
pub fn numbers_equal(a: u32, b: u32) -> (r: bool)
    ensures
        r == same_number(a, b),
{
    let a_nan: bool = (a & MAGNITUDE) > INFINITY;
    let b_nan: bool = (b & MAGNITUDE) > INFINITY;
    !a_nan && !b_nan && (a == b || ((a | b) & MAGNITUDE) == 0)
}

/// The function accepts every pair of arguments.
pub open spec fn total<F: Fn(u32, u32) -> u32>(f: &F) -> bool {
    forall|a: u32, b: u32| #[trigger] f.requires((a, b))
}

/// The function's result is fixed by its arguments.
pub open spec fn single_valued<F: Fn(u32, u32) -> u32>(f: &F) -> bool {
    forall|a: u32, b: u32, r1: u32, r2: u32|
        #[trigger] f.ensures((a, b), r1) && #[trigger] f.ensures((a, b), r2) ==> r1 == r2
}

/// What a single-valued function returns on `(a, b)`.
pub open spec fn value_of<F: Fn(u32, u32) -> u32>(f: &F, a: u32, b: u32) -> u32 {
    choose|r: u32| f.ensures((a, b), r)
}

/// The binary operation that `f` computes, as a mathematical function.
pub open spec fn operation_of<F: Fn(u32, u32) -> u32>(f: &F) -> spec_fn(u32, u32) -> u32 {
    |a: u32, b: u32| value_of(f, a, b)
}

/// Calls `f` and names what came back.
pub fn apply<F: Fn(u32, u32) -> u32>(f: &F, a: u32, b: u32) -> (r: u32)
    requires
        total(f),
        single_valued(f),
    ensures
        r == operation_of(f)(a, b),
{
    f(a, b)
}

} // verus!
