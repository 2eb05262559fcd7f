//! A small interactive shell's core logic: tokenizing a command line under
//! POSIX-like quoting rules, resolving a command name against a search path,
//! and deciding how a token sequence is dispatched to a builtin or an
//! external program.

pub mod builtins;
pub mod dispatch;
pub mod resolver;
pub mod strutil;
pub mod tokenizer;
