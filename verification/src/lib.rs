//! Reverse-mode automatic differentiation over dense tensors of fixed shape.
//!
//! Elements are IEEE 754 single-precision numbers held by their 32-bit
//! patterns. Everything the engine decides by itself (which elements a mask
//! replaces, which gradient slot an operation reads and writes, in which order
//! the tape is replayed, who owns the tape) is stated and proved here. The two
//! arithmetic operations of the backward pass, product and sum of two
//! elements, are handed in by the caller as functions on bit patterns.

pub mod laws;
pub mod mask;
pub mod number;
pub mod order;
pub mod shape;
pub mod tape;
pub mod tensor;
