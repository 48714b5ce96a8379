//! The core of a small interactive shell: the tokenizer that turns a line
//! into its argument list, the closed set of builtins, the search for
//! executables along a search path, and the dispatcher that decides, line by
//! line and reply by reply, what the driver of the shell does next.
//!
//! The library touches neither files nor processes. Its driver reads the
//! lines, carries out each [`dispatch::Action`] and hands back a
//! [`dispatch::Reply`].

pub mod builtin;
pub mod dispatch;
pub mod locator;
pub mod text;
pub mod tokenizer;
