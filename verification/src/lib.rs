//! A mixed-unit arithmetic evaluator.
//!
//! The library performs binary arithmetic (add, subtract, multiply, divide)
//! over a closed set of numeric kinds: plain integers, plain reals,
//! currency-tagged monetary amounts, and relative percentage modifiers.
//! Real values are held as exact rationals, so every contract states the
//! result of an operation exactly.

pub mod math_utils;
pub mod money;
pub mod parse;
pub mod percentage;
pub mod rational;
pub mod render;
pub mod restype;
