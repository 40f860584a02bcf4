//! Execution core of a declarative recipe runner: dependency resolution and
//! ordering, expression evaluation, argument binding, and classification of
//! subprocess outcomes, together with the error catalog that reports every
//! failure precisely.

pub mod binder;
pub mod error;
pub mod eval;
pub mod expr;
pub mod invoke;
pub mod laws;
pub mod outside;
pub mod plan;
pub mod recipe;
pub mod scope;
pub mod strutil;
pub mod suggest;
