//! Differential testing of automatic-differentiation engines.
//!
//! The crate generates random scalar expressions from a byte buffer, interprets
//! them with any numeric backend through one generic evaluator, and judges
//! whether derivative vectors computed by different engines agree.
//!
//! Floating-point numbers never appear in this crate. A double is carried as its
//! IEEE-754 bit pattern in a `u64`; classification, ordering and clamping are
//! done on the bits. Arithmetic on doubles and the writing of doubles are left
//! to the caller, who hands in their results.

pub mod ast_evaluator;
pub mod ast_expr;
pub mod ast_generator;
pub mod chance;
pub mod double;
pub mod entropy;
pub mod fuzz_harness;
pub mod gt_calculators;
pub mod input_decoder;
pub mod literal;
pub mod oracles;
pub mod rpn_evaluator;
pub mod spelling;
pub mod test_definition;
pub mod test_generator;
pub mod text;
