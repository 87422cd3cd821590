//! A minimal interactive shell, split into its verified core: a command-line
//! tokenizer with shell-like quoting and escaping, a search-path resolver,
//! the builtin commands' decision logic, and the command dispatcher.
//!
//! Reading input, touching the filesystem and spawning processes are left to
//! the surrounding binary; everything here is pure logic over plain values.

pub mod builtins;
pub mod dispatch;
pub mod resolver;
pub mod text;
pub mod tokenizer;
