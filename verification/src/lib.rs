//! Front end for a subset of the Modelica modeling language.
//!
//! The crate lowers a grammar-shaped syntax tree into a hierarchical
//! intermediate representation, flattens a chosen class of that
//! representation into a single class with mangled names, and partitions
//! the flattened class into a differential-algebraic-equation system.

pub mod ast;
pub mod dae;
pub mod error;
pub mod flatten;
pub mod laws;
pub mod modelica_grammar;
pub mod omap;
pub mod syntax;
pub mod text;
pub mod visitor;
