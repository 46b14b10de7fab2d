//! A verified line-oriented command interpreter.
//!
//! The crate splits one input line into lexical tokens, assembles the tokens
//! into a pipeline of commands, decides how each command is dispatched
//! (built-in or external program), and routes each command's output to the
//! interpreter's own streams or to a redirection target.  All decisions are
//! pure functions over an explicit shell context; the surrounding program
//! performs the actual reads, writes, directory changes and process spawns.

pub mod auto_complete;
pub mod command;
pub mod executor;
pub mod parser;
pub mod strutil;
pub mod tokenizer;
