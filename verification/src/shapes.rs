//! The implementations of [`crate::command::FromArguments`] for tuples and of
//! [`crate::command::CommandFactory`] for callables, by shape.

pub mod context_plain;
pub mod context_returning;
pub mod parameters;
pub mod plain;
pub mod returning;
