//! A reverse-Polish-notation calculator core: a tokenizer that classifies
//! input words into a closed set of typed tokens, and a stack machine that
//! evaluates a token sequence left to right with exact arity checking.
//!
//! Numeric values are carried as the bit patterns of IEEE 754
//! single-precision numbers; the machine builds the value of an expression
//! symbolically, and callers perform the floating-point arithmetic on the
//! result.

pub mod stack;
pub mod token;
