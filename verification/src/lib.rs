//! Sequential composition of parsers.
//!
//! The crate provides the sequencing combinators of a parser-combinator
//! toolkit: operations that run two or more parsers one after another over a
//! shared input, threading the unconsumed remainder forward and keeping or
//! discarding the individual outputs according to a fixed policy.  Every
//! combinator is verified against a mathematical model of parsing, and the
//! laws that relate the combinators to one another are proved in [`laws`].

pub mod parser;
pub mod sequence;
pub mod leaf;
pub mod laws;
