//! A POSIX-style command shell library: a command tree evaluator with
//! job control, environment substitution and redirection resolution,
//! together with the line-editing helpers (completion rules, keybinding
//! parsing, snippets, selection menu) that a shell front end uses.
//!
//! The shell's interactions with the operating system (spawning, waiting,
//! opening redirect targets, wiring pipes) are routed through an explicit
//! effect handler so that every evaluation decision is made by verified
//! code; the host program supplies the handler that actually forks.

pub mod ast;
pub mod completion;
pub mod cursor_buffer;
pub mod env;
pub mod menu;
pub mod keybinding;
pub mod snippet;
pub mod subst;
pub mod suggester;
pub mod eval;
pub mod process;

use vstd::prelude::*;

verus! {

/// Default formatter for shell error messages: report nothing.
pub fn simple_error() {
}

} // verus!
