//! A gateway between the tool calls of language models and command-line programs: a
//! catalog of functions that pages describe, the resolution of calls into command lines,
//! the plan of where a command runs, and the tool schemas in which the catalog is shown.

pub mod book;
pub mod cli;
pub mod failure;
pub mod runtime;
pub mod strmap;
pub mod text;
