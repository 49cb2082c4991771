//! Cooperative generators: suspendable computations that yield a run of
//! intermediate values and then return one final value, with combinators that
//! compose them.
//!
//! A generator is stepped by value: each step consumes the instance and hands
//! back either a yielded value together with the instance to step next, or the
//! final value. Every combinator is again a generator, and what it does is
//! stated over the one-step model of its operands.

pub mod all;
pub mod call;
pub mod chain;
pub mod counter;
pub mod either;
pub mod generator;
pub mod map_return;
pub mod race;
pub mod state;
pub mod wrap;
